//! Human-readable rendering of HIR declarations for debugging and diagnostics.
//!
//! Entities are shown by the source name that the side table binds to them where there is
//! one, and otherwise by a short prefix and their numeric id (`l2`, `fn0`, `struct1`,
//! `field4`); blocks, nodes, values and regions always render as `bb3`, `n7`, `v5`, `r0`.

use vstd::prelude::*;
use crate::hir_datatypes::{HirType, HirTypeKind, TypeContext, TypeId};
use crate::hir_nodes::{CallTarget, HirField, HirFunction, HirLocal, HirStruct, HostFunctionPath, ValueKind};
use crate::hir_side_table::{resolved_name, HirSideTable};
use crate::ids::{BlockId, ChoiceId, FieldId, FunctionId, HirNodeId, HirValueId, InternedString, LocalId, RegionId, StructId};
use crate::string_table::StringTable;
use crate::text::{decimal, join, lemma_join_push, number_label, push_char};

verus! {

/// The text of a path: the texts of its segments joined by `/`.
pub open spec fn path_text(segments: Seq<InternedString>, table: Seq<Seq<char>>) -> Seq<char>
    decreases segments.len(),
{
    if segments.len() == 0 {
        Seq::empty()
    } else if segments.len() == 1 {
        table[segments[0] as int]
    } else {
        path_text(segments.drop_last(), table) + seq!['/'] + table[segments.last() as int]
    }
}


/// Depth at which type rendering stops following type ids and prints the bare id instead,
/// so that cyclic type tables still render.
pub const MAX_TYPE_RENDER_DEPTH: usize = 24;

/// What the renderer includes besides the entities themselves.
#[derive(Debug, Clone, Copy, PartialEq, Eq, Structural)]
pub struct HirDisplayOptions {
    pub include_ids: bool,
    pub include_types: bool,
    pub include_value_kinds: bool,
    pub include_regions: bool,
    pub multiline_match_arms: bool,
}

/// The default options: ids, types and regions on, value kinds off, match arms one per
/// line.
pub open spec fn default_display_options() -> HirDisplayOptions {
    HirDisplayOptions {
        include_ids: true,
        include_types: true,
        include_value_kinds: false,
        include_regions: true,
        multiline_match_arms: true,
    }
}

impl Default for HirDisplayOptions {
    /// Ids, types and regions on, value kinds off, match arms one per line.
    fn default() -> (o: Self)
        ensures
            o == default_display_options(),
    {
        HirDisplayOptions {
            include_ids: true,
            include_types: true,
            include_value_kinds: false,
            include_regions: true,
            multiline_match_arms: true,
        }
    }
}

/// `name` where present, otherwise `prefix` followed by the decimal number `n`.
pub open spec fn name_or_number(name: Option<Seq<char>>, prefix: Seq<char>, n: u32) -> Seq<char> {
    match name {
        Some(s) => s,
        None => prefix + decimal(n as nat),
    }
}

/// `n` space characters.
pub open spec fn spaces(n: nat) -> Seq<char> {
    Seq::new(n, |i: int| ' ')
}

/// One output line: the indentation, the text and a newline.
pub open spec fn indented_line(indent: nat, line: Seq<char>) -> Seq<char> {
    spaces(indent) + line + seq!['\n']
}

/// Each of `lines` as an indented output line, in order.
pub open spec fn indented_lines(lines: Seq<Seq<char>>, indent: nat) -> Seq<char>
    decreases lines.len(),
{
    if lines.len() == 0 {
        Seq::empty()
    } else {
        indented_lines(lines.drop_last(), indent) + indented_line(indent, lines.last())
    }
}

/// `line` without one trailing carriage return.
pub open spec fn strip_cr(line: Seq<char>) -> Seq<char> {
    if line.len() > 0 && line.last() == '\r' {
        line.drop_last()
    } else {
        line
    }
}

/// Scanning `s` for line breaks: the lines ended by a newline so far (each without its
/// `\n` or `\r\n`) and the text after the last newline.
pub open spec fn line_scan(s: Seq<char>) -> (Seq<Seq<char>>, Seq<char>)
    decreases s.len(),
{
    if s.len() == 0 {
        (Seq::empty(), Seq::empty())
    } else {
        let (done, current) = line_scan(s.drop_last());
        if s.last() == '\n' {
            (done.push(strip_cr(current)), Seq::empty())
        } else {
            (done, current.push(s.last()))
        }
    }
}

/// The lines of `s`: split at `\n` or `\r\n`, with a final line ending optional (a string
/// that ends in one has no empty last line).
pub open spec fn text_lines(s: Seq<char>) -> Seq<Seq<char>> {
    let (done, current) = line_scan(s);
    if current.len() > 0 {
        done.push(current)
    } else {
        done
    }
}

/// Whether rendering type `ty` at `depth` only follows ids that `types` holds.
pub open spec fn type_in_range(types: Seq<HirType>, ty: TypeId, depth: int) -> bool
    decreases MAX_TYPE_RENDER_DEPTH as int - depth, 0int,
{
    if depth >= MAX_TYPE_RENDER_DEPTH as int {
        true
    } else if ty.0 as int >= types.len() {
        false
    } else {
        match types[ty.0 as int].kind {
            HirTypeKind::Tuple { fields } => types_in_range(types, fields@, depth + 1),
            HirTypeKind::Collection { element } => type_in_range(types, element, depth + 1),
            HirTypeKind::Function { receiver, params, returns: results } => {
                &&& match receiver {
                    Some(r) => type_in_range(types, r, depth + 1),
                    None => true,
                }
                &&& types_in_range(types, params@, depth + 1)
                &&& types_in_range(types, results@, depth + 1)
            },
            HirTypeKind::Option { inner } => type_in_range(types, inner, depth + 1),
            HirTypeKind::Result { ok, err } => type_in_range(types, ok, depth + 1) && type_in_range(
                types,
                err,
                depth + 1,
            ),
            _ => true,
        }
    }
}

/// Whether every type of `list` renders within `types` at `depth`.
pub open spec fn types_in_range(types: Seq<HirType>, list: Seq<TypeId>, depth: int) -> bool
    decreases MAX_TYPE_RENDER_DEPTH as int - depth, 1int,
{
    forall|i: int| 0 <= i < list.len() ==> type_in_range(types, #[trigger] list[i], depth)
}

/// Renders HIR entities against a string table and, optionally, a side table of source
/// names and a type context.
#[derive(Clone, Copy)]
pub struct HirDisplayContext<'a> {
    string_table: &'a StringTable,
    side_table: Option<&'a HirSideTable>,
    type_context: Option<&'a TypeContext>,
    options: HirDisplayOptions,
}

impl<'a> HirDisplayContext<'a> {
    /// The strings that names resolve in.
    pub closed spec fn table(&self) -> Seq<Seq<char>> {
        self.string_table@
    }

    /// The side table of source names, if one is attached.
    pub closed spec fn side(&self) -> Option<HirSideTable> {
        match self.side_table {
            Some(s) => Some(*s),
            None => None,
        }
    }

    /// The stored types, if a type context is attached.
    pub closed spec fn types(&self) -> Option<Seq<HirType>> {
        match self.type_context {
            Some(t) => Some(t@),
            None => None,
        }
    }

    /// The rendering options.
    pub closed spec fn options(&self) -> HirDisplayOptions {
        self.options
    }

    // ------------------------------------------------------------------
    // What each renderer produces
    // ------------------------------------------------------------------

    /// Label of a local: its bound name, or `l` and its id.
    pub open spec fn local_label_text(&self, id: LocalId) -> Seq<char> {
        name_or_number(
            match self.side() {
                Some(side) => resolved_name(side.local_names(), self.table(), id.0),
                None => None,
            },
            "l"@,
            id.0,
        )
    }

    /// Label of a function: its bound name, or `fn` and its id.
    pub open spec fn function_label_text(&self, id: FunctionId) -> Seq<char> {
        name_or_number(
            match self.side() {
                Some(side) => resolved_name(side.function_names(), self.table(), id.0),
                None => None,
            },
            "fn"@,
            id.0,
        )
    }

    /// Label of a struct: its bound name, or `struct` and its id.
    pub open spec fn struct_label_text(&self, id: StructId) -> Seq<char> {
        name_or_number(
            match self.side() {
                Some(side) => resolved_name(side.struct_names(), self.table(), id.0),
                None => None,
            },
            "struct"@,
            id.0,
        )
    }

    /// Label of a field: its bound name, or `field` and its id.
    pub open spec fn field_label_text(&self, id: FieldId) -> Seq<char> {
        name_or_number(
            match self.side() {
                Some(side) => resolved_name(side.field_names(), self.table(), id.0),
                None => None,
            },
            "field"@,
            id.0,
        )
    }

    /// Label of a choice type: its bound name, or `choice` and its id.
    pub open spec fn choice_label_text(&self, id: ChoiceId) -> Seq<char> {
        name_or_number(
            match self.side() {
                Some(side) => resolved_name(side.choice_names(), self.table(), id.0),
                None => None,
            },
            "choice"@,
            id.0,
        )
    }

    /// Label of a block: `bb` and its id.
    pub open spec fn block_label_text(&self, id: BlockId) -> Seq<char> {
        "bb"@ + decimal(id.0 as nat)
    }

    /// Label of a statement node: `n` and its id.
    pub open spec fn node_label_text(&self, id: HirNodeId) -> Seq<char> {
        "n"@ + decimal(id.0 as nat)
    }

    /// Label of a value: `v` and its id.
    pub open spec fn value_label_text(&self, id: HirValueId) -> Seq<char> {
        "v"@ + decimal(id.0 as nat)
    }

    /// Label of a region: `r` and its id.
    pub open spec fn region_label_text(&self, id: RegionId) -> Seq<char> {
        "r"@ + decimal(id.0 as nat)
    }

    /// The rendering of type `ty` at nesting `depth`: primitive kinds by name, compound
    /// kinds with their components, nominal kinds by label, and the bare id `t<n>` once
    /// the depth limit is reached.
    pub open spec fn type_text(&self, types: Seq<HirType>, ty: TypeId, depth: int) -> Seq<char>
        decreases MAX_TYPE_RENDER_DEPTH as int - depth, 0int,
    {
        if depth >= MAX_TYPE_RENDER_DEPTH as int || ty.0 as int >= types.len() {
            "t"@ + decimal(ty.0 as nat)
        } else {
            match types[ty.0 as int].kind {
                HirTypeKind::Bool => "Bool"@,
                HirTypeKind::Int => "Int"@,
                HirTypeKind::Float => "Float"@,
                HirTypeKind::Decimal => "Decimal"@,
                HirTypeKind::Char => "Char"@,
                HirTypeKind::String => "String"@,
                HirTypeKind::Range => "Range"@,
                HirTypeKind::Unit => "()"@,
                HirTypeKind::Tuple { fields } => if fields@.len() == 0 {
                    "()"@
                } else {
                    "("@ + self.type_list_text(types, fields@, depth + 1, ", "@) + ")"@
                },
                HirTypeKind::Collection { element } => "["@ + self.type_text(types, element, depth + 1)
                    + "]"@,
                HirTypeKind::Struct { struct_id } => self.struct_label_text(struct_id),
                HirTypeKind::Function { receiver, params, returns: results } => {
                    let recv = match receiver {
                        Some(r) => self.type_text(types, r, depth + 1) + "."@,
                        None => Seq::empty(),
                    };
                    let rets = if results@.len() == 0 {
                        "()"@
                    } else if results@.len() == 1 {
                        self.type_text(types, results@[0], depth + 1)
                    } else {
                        "("@ + self.type_list_text(types, results@, depth + 1, ", "@) + ")"@
                    };
                    "fn("@ + recv + self.type_list_text(types, params@, depth + 1, ", "@) + ")->"@ + rets
                },
                HirTypeKind::Option { inner } => "Option<"@ + self.type_text(types, inner, depth + 1)
                    + ">"@,
                HirTypeKind::Result { ok, err } => "Result<"@ + self.type_text(types, ok, depth + 1)
                    + ", "@ + self.type_text(types, err, depth + 1) + ">"@,
                HirTypeKind::Choice { choice_id } => self.choice_label_text(choice_id),
                HirTypeKind::External { type_id } => "external"@ + decimal(type_id.0 as nat),
            }
        }
    }

    /// The renderings of the types of `list` at `depth`, separated by `sep`.
    pub open spec fn type_list_text(&self, types: Seq<HirType>, list: Seq<TypeId>, depth: int, sep: Seq<char>) -> Seq<char>
        decreases MAX_TYPE_RENDER_DEPTH as int - depth, list.len() + 1,
    {
        if list.len() == 0 {
            Seq::empty()
        } else if list.len() == 1 {
            self.type_text(types, list[0], depth)
        } else {
            self.type_list_text(types, list.drop_last(), depth, sep) + sep + self.type_text(
                types,
                list.last(),
                depth,
            )
        }
    }

    /// Whether the type label of `ty` can be rendered: always without a type context,
    /// and with one when every type id it reaches is stored.
    pub open spec fn type_renders(&self, ty: TypeId) -> bool {
        match self.types() {
            Some(types) => type_in_range(types, ty, 0),
            None => true,
        }
    }

    /// Label of a type: `t` and its id without a type context, its rendering otherwise.
    pub open spec fn type_label_text(&self, ty: TypeId) -> Seq<char> {
        match self.types() {
            Some(types) => self.type_text(types, ty, 0),
            None => "t"@ + decimal(ty.0 as nat),
        }
    }

    /// A field: its label, followed by `: ` and its type when types are included.
    pub open spec fn field_text(&self, field: HirField) -> Seq<char> {
        if self.options().include_types {
            self.field_label_text(field.id) + ": "@ + self.type_label_text(field.ty)
        } else {
            self.field_label_text(field.id)
        }
    }

    /// A struct: its label, then its fields between `{ ` and ` }`, separated by `, `.
    pub open spec fn struct_text(&self, s: HirStruct) -> Seq<char> {
        self.struct_label_text(s.id) + " { "@ + join(
            s.fields@.map_values(|f: HirField| self.field_text(f)),
            ", "@,
        ) + " }"@
    }

    /// A function: its label, its parameters in parentheses separated by `, `, its return
    /// type after ` -> ` when types are included, and its entry block.
    pub open spec fn function_text(&self, f: HirFunction) -> Seq<char> {
        self.function_label_text(f.id) + "("@ + join(
            f.params@.map_values(|p: LocalId| self.local_label_text(p)),
            ", "@,
        ) + ")"@ + (if self.options().include_types {
            " -> "@ + self.type_label_text(f.return_type)
        } else {
            Seq::empty()
        }) + " [entry: "@ + self.block_label_text(f.entry) + "]"@
    }

    /// A local: `mut ` when mutable, its label, its type after `: ` when types are
    /// included, and its region in brackets when regions are included.
    pub open spec fn local_text(&self, local: HirLocal) -> Seq<char> {
        (if local.mutable {
            "mut "@
        } else {
            Seq::empty()
        }) + self.local_label_text(local.id) + (if self.options().include_types {
            ": "@ + self.type_label_text(local.ty)
        } else {
            Seq::empty()
        }) + (if self.options().include_regions {
            " ["@ + self.region_label_text(local.region) + "]"@
        } else {
            Seq::empty()
        })
    }

    /// A call target: the function's label, or the host function's own name (its path's
    /// last segment), or the whole path when that segment is missing or unknown.
    pub open spec fn call_target_text(&self, target: CallTarget) -> Seq<char> {
        match target {
            CallTarget::UserFunction(id) => self.function_label_text(id),
            CallTarget::HostFunction(path) => if path.segments@.len() > 0
                && (path.segments@.last() as int) < self.table().len() {
                self.table()[path.segments@.last() as int]
            } else {
                path_text(path.segments@, self.table())
            },
        }
    }

    /// A host path can be rendered: its last segment names the function, or else every
    /// segment is in the table so that the whole path can be spelled out.
    pub open spec fn host_path_renderable(&self, path: HostFunctionPath) -> bool {
        ||| path.segments@.len() > 0 && (path.segments@.last() as int) < self.table().len()
        ||| path.resolvable(self.table())
    }

    // ------------------------------------------------------------------
    // Construction
    // ------------------------------------------------------------------

    /// A renderer over `string_table` with default options, no side table and no type
    /// context.
    pub fn new(string_table: &'a StringTable) -> (c: Self)
        ensures
            c.table() == string_table@,
            c.side() is None,
            c.types() is None,
            c.options() == default_display_options(),
    {
        Self { string_table, side_table: None, type_context: None, options: HirDisplayOptions::default() }
    }

    /// The same renderer with `side_table` as its source of names.
    pub fn with_side_table(self, side_table: &'a HirSideTable) -> (c: Self)
        ensures
            c.table() == self.table(),
            c.side() == Some(*side_table),
            c.types() == self.types(),
            c.options() == self.options(),
    {
        let mut c = self;
        c.side_table = Some(side_table);
        c
    }

    /// The same renderer with `type_context` used to render types.
    pub fn with_type_context(self, type_context: &'a TypeContext) -> (c: Self)
        ensures
            c.table() == self.table(),
            c.side() == self.side(),
            c.types() == Some(type_context@),
            c.options() == self.options(),
    {
        let mut c = self;
        c.type_context = Some(type_context);
        c
    }

    // ------------------------------------------------------------------
    // Types
    // ------------------------------------------------------------------

    /// Renders type `ty` of `type_context` at nesting `depth`.
    pub fn render_type_with_context(&self, type_context: &TypeContext, ty: TypeId, depth: usize) -> (s: String)
        requires
            type_in_range(type_context@, ty, depth as int),
        ensures
            s@ == self.type_text(type_context@, ty, depth as int),
        decreases MAX_TYPE_RENDER_DEPTH as int - depth, 0int,
    {
        if depth >= MAX_TYPE_RENDER_DEPTH {
            return number_label("t", ty.0);
        }
        let kind = &type_context.get(ty).kind;
        match kind {
            HirTypeKind::Bool => String::from_str("Bool"),
            HirTypeKind::Int => String::from_str("Int"),
            HirTypeKind::Float => String::from_str("Float"),
            HirTypeKind::Decimal => String::from_str("Decimal"),
            HirTypeKind::Char => String::from_str("Char"),
            HirTypeKind::String => String::from_str("String"),
            HirTypeKind::Range => String::from_str("Range"),
            HirTypeKind::Unit => String::from_str("()"),
            HirTypeKind::Tuple { fields } => {
                if fields.len() == 0 {
                    return String::from_str("()");
                }
                let inner = self.render_type_list(type_context, fields, depth + 1, ", ");
                let mut out = String::from_str("(");
                out.append(inner.as_str());
                out.append(")");
                out
            },
            HirTypeKind::Collection { element } => {
                let inner = self.render_type_with_context(type_context, *element, depth + 1);
                let mut out = String::from_str("[");
                out.append(inner.as_str());
                out.append("]");
                out
            },
            HirTypeKind::Struct { struct_id } => self.struct_label(*struct_id),
            HirTypeKind::Function { receiver, params, returns: results } => {
                let mut out = String::from_str("fn(");
                if let Some(recv) = receiver {
                    let r = self.render_type_with_context(type_context, *recv, depth + 1);
                    out.append(r.as_str());
                    out.append(".");
                }
                let ps = self.render_type_list(type_context, params, depth + 1, ", ");
                out.append(ps.as_str());
                out.append(")->");
                if results.len() == 0 {
                    out.append("()");
                } else if results.len() == 1 {
                    proof {
                        assert(types_in_range(type_context@, results@, depth + 1));
                        assert(type_in_range(type_context@, results@[0], depth + 1));
                    }
                    let r = self.render_type_with_context(type_context, results[0], depth + 1);
                    out.append(r.as_str());
                } else {
                    let rs = self.render_type_list(type_context, results, depth + 1, ", ");
                    out.append("(");
                    out.append(rs.as_str());
                    out.append(")");
                }
                out
            },
            HirTypeKind::Option { inner } => {
                let i = self.render_type_with_context(type_context, *inner, depth + 1);
                let mut out = String::from_str("Option<");
                out.append(i.as_str());
                out.append(">");
                out
            },
            HirTypeKind::Result { ok, err } => {
                let o = self.render_type_with_context(type_context, *ok, depth + 1);
                let e = self.render_type_with_context(type_context, *err, depth + 1);
                let mut out = String::from_str("Result<");
                out.append(o.as_str());
                out.append(", ");
                out.append(e.as_str());
                out.append(">");
                out
            },
            HirTypeKind::Choice { choice_id } => self.choice_label(*choice_id),
            HirTypeKind::External { type_id } => number_label("external", type_id.0),
        }
    }

    /// Renders the types of `list` at `depth`, separated by `sep`.
    fn render_type_list(&self, type_context: &TypeContext, list: &Vec<TypeId>, depth: usize, sep: &str) -> (s: String)
        requires
            types_in_range(type_context@, list@, depth as int),
        ensures
            s@ == self.type_list_text(type_context@, list@, depth as int, sep@),
        decreases MAX_TYPE_RENDER_DEPTH as int - depth, 1int,
    {
        let mut out = String::new();
        let mut i: usize = 0;
        while i < list.len()
            invariant
                0 <= i <= list@.len(),
                types_in_range(type_context@, list@, depth as int),
                out@ == self.type_list_text(type_context@, list@.take(i as int), depth as int, sep@),
            decreases list@.len() - i,
        {
            if i > 0 {
                out.append(sep);
            }
            proof {
                assert(type_in_range(type_context@, list@[i as int], depth as int));
            }
            let t = self.render_type_with_context(type_context, list[i], depth);
            out.append(t.as_str());
            proof {
                assert(list@.take(i + 1).drop_last() =~= list@.take(i as int));
                assert(list@.take(i + 1).last() == list@[i as int]);
                if i == 0 {
                    assert(list@.take(1)[0] == list@[0]);
                }
            }
            i = i + 1;
        }
        proof {
            assert(list@.take(list@.len() as int) =~= list@);
        }
        out
    }

    /// The label of a type.
    pub fn type_label(&self, ty: TypeId) -> (s: String)
        requires
            self.type_renders(ty),
        ensures
            s@ == self.type_label_text(ty),
    {
        match self.type_context {
            Some(type_context) => self.render_type_with_context(type_context, ty, 0),
            None => number_label("t", ty.0),
        }
    }

    // ------------------------------------------------------------------
    // Declarations
    // ------------------------------------------------------------------

    /// Renders a struct field.
    pub fn render_field(&self, field: &HirField) -> (s: String)
        requires
            self.options().include_types ==> self.type_renders(field.ty),
        ensures
            s@ == self.field_text(*field),
    {
        if self.options.include_types {
            let mut out = self.field_label(field.id);
            out.append(": ");
            let t = self.type_label(field.ty);
            out.append(t.as_str());
            out
        } else {
            self.field_label(field.id)
        }
    }

    /// Renders a struct declaration.
    pub fn render_struct(&self, hir_struct: &HirStruct) -> (s: String)
        requires
            self.options().include_types ==> forall|i: int|
                0 <= i < hir_struct.fields@.len() ==> self.type_renders(#[trigger] hir_struct.fields@[i].ty),
        ensures
            s@ == self.struct_text(*hir_struct),
    {
        let ghost parts = hir_struct.fields@.map_values(|f: HirField| self.field_text(f));
        let mut out = self.struct_label(hir_struct.id);
        out.append(" { ");
        let ghost head = out@;
        let mut idx: usize = 0;
        while idx < hir_struct.fields.len()
            invariant
                0 <= idx <= hir_struct.fields@.len(),
                parts == hir_struct.fields@.map_values(|f: HirField| self.field_text(f)),
                self.options().include_types ==> forall|i: int|
                    0 <= i < hir_struct.fields@.len() ==> self.type_renders(#[trigger] hir_struct.fields@[i].ty),
                out@ == head + join(parts.take(idx as int), ", "@),
            decreases hir_struct.fields@.len() - idx,
        {
            if idx > 0 {
                out.append(", ");
            }
            let f = self.render_field(&hir_struct.fields[idx]);
            out.append(f.as_str());
            proof {
                assert(parts.take(idx + 1) =~= parts.take(idx as int).push(parts[idx as int]));
                lemma_join_push(parts.take(idx as int), ", "@, parts[idx as int]);
            }
            idx = idx + 1;
        }
        out.append(" }");
        proof {
            assert(parts.take(parts.len() as int) =~= parts);
        }
        out
    }

    /// Renders a function declaration.
    pub fn render_function(&self, function: &HirFunction) -> (s: String)
        requires
            self.options().include_types ==> self.type_renders(function.return_type),
        ensures
            s@ == self.function_text(*function),
    {
        let ghost parts = function.params@.map_values(|p: LocalId| self.local_label_text(p));
        let mut out = self.function_label(function.id);
        out.append("(");
        let ghost head = out@;
        let mut idx: usize = 0;
        while idx < function.params.len()
            invariant
                0 <= idx <= function.params@.len(),
                parts == function.params@.map_values(|p: LocalId| self.local_label_text(p)),
                out@ == head + join(parts.take(idx as int), ", "@),
            decreases function.params@.len() - idx,
        {
            if idx > 0 {
                out.append(", ");
            }
            let l = self.local_label(function.params[idx]);
            out.append(l.as_str());
            proof {
                assert(parts.take(idx + 1) =~= parts.take(idx as int).push(parts[idx as int]));
                lemma_join_push(parts.take(idx as int), ", "@, parts[idx as int]);
            }
            idx = idx + 1;
        }
        proof {
            assert(parts.take(parts.len() as int) =~= parts);
        }
        out.append(")");
        if self.options.include_types {
            out.append(" -> ");
            let t = self.type_label(function.return_type);
            out.append(t.as_str());
        }
        out.append(" [entry: ");
        let b = self.block_label(function.entry);
        out.append(b.as_str());
        out.append("]");
        out
    }

    /// Renders a local declaration.
    pub fn render_local(&self, local: &HirLocal) -> (s: String)
        requires
            self.options().include_types ==> self.type_renders(local.ty),
        ensures
            s@ == self.local_text(*local),
    {
        let mut out = String::new();
        if local.mutable {
            out.append("mut ");
        }
        let l = self.local_label(local.id);
        out.append(l.as_str());
        if self.options.include_types {
            out.append(": ");
            let t = self.type_label(local.ty);
            out.append(t.as_str());
        }
        if self.options.include_regions {
            out.append(" [");
            let r = self.region_label(local.region);
            out.append(r.as_str());
            out.append("]");
        }
        out
    }

    /// Renders the target of a call: a host function by its own name, or, when the path
    /// has no resolvable last segment, by the whole path.
    pub fn render_call_target(&self, target: &CallTarget) -> (s: String)
        requires
            target matches CallTarget::HostFunction(path) ==> self.host_path_renderable(*path),
        ensures
            s@ == self.call_target_text(*target),
    {
        match target {
            CallTarget::UserFunction(function_id) => self.function_label(*function_id),
            CallTarget::HostFunction(path) => match path.name_str(self.string_table) {
                Some(name) => String::from_str(name),
                None => self.render_path(path),
            },
        }
    }

    /// The text of a whole path: its segments' texts joined by `/`.
    pub fn render_path(&self, path: &HostFunctionPath) -> (s: String)
        requires
            path.resolvable(self.table()),
        ensures
            s@ == path_text(path.segments@, self.table()),
    {
        let mut out = String::new();
        let mut i: usize = 0;
        while i < path.segments.len()
            invariant
                0 <= i <= path.segments@.len(),
                path.resolvable(self.table()),
                out@ == path_text(path.segments@.take(i as int), self.table()),
            decreases path.segments@.len() - i,
        {
            proof {
                assert(path.segments@.take(i + 1).drop_last() =~= path.segments@.take(i as int));
                assert(path.segments@.take(i + 1).last() == path.segments@[i as int]);
            }
            if i > 0 {
                push_char(&mut out, '/');
            }
            out.append(self.string_table.resolve(path.segments[i]));
            i = i + 1;
        }
        proof {
            assert(path.segments@.take(path.segments@.len() as int) =~= path.segments@);
        }
        out
    }

    // ------------------------------------------------------------------
    // Layout
    // ------------------------------------------------------------------

    /// Appends `line` to `out`, indented by `indent` spaces and ended by a newline.
    pub fn push_indented_line(&self, out: &mut String, indent: usize, line: &str)
        ensures
            final(out)@ == old(out)@ + indented_line(indent as nat, line@),
    {
        let mut i: usize = 0;
        while i < indent
            invariant
                0 <= i <= indent,
                out@ == old(out)@ + spaces(i as nat),
            decreases indent - i,
        {
            push_char(out, ' ');
            proof {
                assert(spaces(i as nat).push(' ') =~= spaces((i + 1) as nat));
            }
            i = i + 1;
        }
        out.append(line);
        push_char(out, '\n');
        proof {
            assert(final(out)@ =~= old(out)@ + indented_line(indent as nat, line@));
        }
    }

    /// Appends each line of `text` to `out` as an indented line.
    pub fn push_indented_multiline(&self, out: &mut String, indent: usize, text: &str)
        ensures
            final(out)@ == old(out)@ + indented_lines(text_lines(text@), indent as nat),
    {
        let ghost all = text@;
        // The text of the current line, without a carriage return that may still turn out
        // to end the line (`pending_cr`).
        let mut current = String::new();
        let mut pending_cr = false;
        let mut has_text = false;
        for c in it: text.chars()
            invariant
                it.seq() == all,
                all == text@,
                out@ == old(out)@ + indented_lines(line_scan(all.take(it.index() as int)).0, indent as nat),
                line_scan(all.take(it.index() as int)).1 == if pending_cr {
                    current@.push('\r')
                } else {
                    current@
                },
                !pending_cr ==> (current@.len() == 0 || current@.last() != '\r'),
                has_text == (line_scan(all.take(it.index() as int)).1.len() > 0),
        {
            let ghost k = it.index() as int;
            let ghost before = line_scan(all.take(k));
            proof {
                assert(all.take(k + 1).drop_last() =~= all.take(k));
                assert(all.take(k + 1).last() == c);
            }
            if c == '\n' {
                proof {
                    if pending_cr {
                        assert(current@.push('\r').drop_last() =~= current@);
                    }
                    assert(strip_cr(before.1) == current@);
                    assert(before.0.push(current@).drop_last() =~= before.0);
                }
                self.push_indented_line(out, indent, current.as_str());
                current = String::new();
                pending_cr = false;
                has_text = false;
            } else if c == '\r' {
                if pending_cr {
                    push_char(&mut current, '\r');
                }
                pending_cr = true;
                has_text = true;
            } else {
                if pending_cr {
                    push_char(&mut current, '\r');
                }
                push_char(&mut current, c);
                pending_cr = false;
                has_text = true;
            }
        }
        proof {
            assert(all.take(all.len() as int) =~= all);
        }
        if has_text {
            if pending_cr {
                push_char(&mut current, '\r');
            }
            proof {
                let scanned = line_scan(all);
                assert(scanned.0.push(current@).drop_last() =~= scanned.0);
            }
            self.push_indented_line(out, indent, current.as_str());
        }
    }

    // ------------------------------------------------------------------
    // Labels
    // ------------------------------------------------------------------

    /// The label of a local.
    pub fn local_label(&self, id: LocalId) -> (s: String)
        ensures
            s@ == self.local_label_text(id),
    {
        if let Some(side) = self.side_table {
            if let Some(name) = side.resolve_local_name(id, self.string_table) {
                return String::from_str(name);
            }
        }
        number_label("l", id.0)
    }

    /// The label of a function.
    pub fn function_label(&self, id: FunctionId) -> (s: String)
        ensures
            s@ == self.function_label_text(id),
    {
        if let Some(side) = self.side_table {
            if let Some(name) = side.resolve_function_name(id, self.string_table) {
                return String::from_str(name);
            }
        }
        number_label("fn", id.0)
    }

    /// The label of a struct.
    pub fn struct_label(&self, id: StructId) -> (s: String)
        ensures
            s@ == self.struct_label_text(id),
    {
        if let Some(side) = self.side_table {
            if let Some(name) = side.resolve_struct_name(id, self.string_table) {
                return String::from_str(name);
            }
        }
        number_label("struct", id.0)
    }

    /// The label of a field.
    pub fn field_label(&self, id: FieldId) -> (s: String)
        ensures
            s@ == self.field_label_text(id),
    {
        if let Some(side) = self.side_table {
            if let Some(name) = side.resolve_field_name(id, self.string_table) {
                return String::from_str(name);
            }
        }
        number_label("field", id.0)
    }

    /// The label of a choice type.
    pub fn choice_label(&self, id: ChoiceId) -> (s: String)
        ensures
            s@ == self.choice_label_text(id),
    {
        if let Some(side) = self.side_table {
            if let Some(name) = side.resolve_choice_name(id, self.string_table) {
                return String::from_str(name);
            }
        }
        number_label("choice", id.0)
    }

    /// The label of a block.
    pub fn block_label(&self, id: BlockId) -> (s: String)
        ensures
            s@ == self.block_label_text(id),
    {
        number_label("bb", id.0)
    }

    /// The label of a statement node.
    pub fn node_label(&self, id: HirNodeId) -> (s: String)
        ensures
            s@ == self.node_label_text(id),
    {
        number_label("n", id.0)
    }

    /// The label of a value.
    pub fn value_label(&self, id: HirValueId) -> (s: String)
        ensures
            s@ == self.value_label_text(id),
    {
        number_label("v", id.0)
    }

    /// The label of a region.
    pub fn region_label(&self, id: RegionId) -> (s: String)
        ensures
            s@ == self.region_label_text(id),
    {
        number_label("r", id.0)
    }

    /// The name of a value kind.
    pub fn value_kind_label(&self, value_kind: ValueKind) -> (s: &'static str)
        ensures
            s@ == match value_kind {
                ValueKind::Place => "place"@,
                ValueKind::RValue => "rvalue"@,
                ValueKind::Const => "const"@,
            },
    {
        match value_kind {
            ValueKind::Place => "place",
            ValueKind::RValue => "rvalue",
            ValueKind::Const => "const",
        }
    }
}

/// Law: distinct blocks render with distinct labels.
pub proof fn lemma_block_labels_distinct(d: HirDisplayContext, a: BlockId, b: BlockId)
    requires
        d.block_label_text(a) == d.block_label_text(b),
    ensures
        a == b,
{
    reveal_strlit("bb");
    let pa = d.block_label_text(a);
    let pb = d.block_label_text(b);
    assert(pa.skip(2) =~= decimal(a.0 as nat));
    assert(pb.skip(2) =~= decimal(b.0 as nat));
    crate::text::lemma_decimal_injective(a.0 as nat, b.0 as nat);
}

/// Whether a type kind is primitive: a scalar, the string type or the range type.
pub open spec fn is_primitive_kind(k: HirTypeKind) -> bool {
    k is Bool || k is Int || k is Float || k is Decimal || k is Char || k is String || k is Range
}

/// Law: a stored type of a primitive kind renders as the kind's own name, below the depth
/// limit and so as a type label with a type context: `Bool`, `Int`, `Float`, `Decimal`,
/// `Char`, `String`, `Range`.
pub proof fn lemma_primitive_type_names(d: HirDisplayContext, types: Seq<HirType>, ty: TypeId, depth: int)
    requires
        0 <= depth < MAX_TYPE_RENDER_DEPTH as int,
        (ty.0 as int) < types.len(),
    ensures
        types[ty.0 as int].kind is Bool ==> d.type_text(types, ty, depth) == seq!['B', 'o', 'o', 'l'],
        types[ty.0 as int].kind is Int ==> d.type_text(types, ty, depth) == seq!['I', 'n', 't'],
        types[ty.0 as int].kind is Float ==> d.type_text(types, ty, depth) == seq!['F', 'l', 'o', 'a', 't'],
        types[ty.0 as int].kind is Decimal ==> d.type_text(types, ty, depth) == seq!['D', 'e', 'c', 'i', 'm', 'a', 'l'],
        types[ty.0 as int].kind is Char ==> d.type_text(types, ty, depth) == seq!['C', 'h', 'a', 'r'],
        types[ty.0 as int].kind is String ==> d.type_text(types, ty, depth) == seq!['S', 't', 'r', 'i', 'n', 'g'],
        types[ty.0 as int].kind is Range ==> d.type_text(types, ty, depth) == seq!['R', 'a', 'n', 'g', 'e'],
        d.types() == Some(types) ==> d.type_label_text(ty) == d.type_text(types, ty, 0),
{
    reveal_strlit("Bool");
    reveal_strlit("Int");
    reveal_strlit("Float");
    reveal_strlit("Decimal");
    reveal_strlit("Char");
    reveal_strlit("String");
    reveal_strlit("Range");
}

/// Law: compound types render around their components in order, each component one
/// level deeper: a collection as `[element]`, an option as `Option<inner>`, a result as
/// `Result<ok, err>` (success type first), and the unit type as `()`.
pub proof fn lemma_compound_type_texts(d: HirDisplayContext, types: Seq<HirType>, ty: TypeId, depth: int)
    requires
        0 <= depth < MAX_TYPE_RENDER_DEPTH as int,
        (ty.0 as int) < types.len(),
    ensures
        types[ty.0 as int].kind matches HirTypeKind::Collection { element } ==> d.type_text(types, ty, depth) == seq!['['] + d.type_text(
            types,
            element,
            depth + 1,
        ) + seq![']'],
        types[ty.0 as int].kind matches HirTypeKind::Option { inner } ==> d.type_text(types, ty, depth) == seq![
            'O',
            'p',
            't',
            'i',
            'o',
            'n',
            '<',
        ] + d.type_text(types, inner, depth + 1) + seq!['>'],
        types[ty.0 as int].kind matches HirTypeKind::Result { ok, err } ==> d.type_text(types, ty, depth) == seq![
            'R',
            'e',
            's',
            'u',
            'l',
            't',
            '<',
        ] + d.type_text(types, ok, depth + 1) + seq![',', ' '] + d.type_text(types, err, depth + 1) + seq!['>'],
        types[ty.0 as int].kind is Unit ==> d.type_text(types, ty, depth) == seq!['(', ')'],
{
    reveal_strlit("[");
    reveal_strlit("]");
    reveal_strlit("Option<");
    reveal_strlit(">");
    reveal_strlit("Result<");
    reveal_strlit(", ");
    reveal_strlit("()");
}

/// Law: stored types of distinct primitive kinds render to distinct texts.
pub proof fn lemma_primitive_type_names_distinct(d: HirDisplayContext, types: Seq<HirType>, a: TypeId, b: TypeId, depth: int)
    requires
        0 <= depth < MAX_TYPE_RENDER_DEPTH as int,
        (a.0 as int) < types.len(),
        (b.0 as int) < types.len(),
        is_primitive_kind(types[a.0 as int].kind),
        is_primitive_kind(types[b.0 as int].kind),
        types[a.0 as int].kind != types[b.0 as int].kind,
    ensures
        d.type_text(types, a, depth) != d.type_text(types, b, depth),
{
    lemma_primitive_type_names(d, types, a, depth);
    lemma_primitive_type_names(d, types, b, depth);
    let (ta, tb) = (d.type_text(types, a, depth), d.type_text(types, b, depth));
    if ta == tb {
        assert(ta.len() == tb.len());
        assert(ta[0] == tb[0]);
    }
}

impl HirFunction {
    /// Renders this function with `display`.
    pub fn display_with_context(&self, display: &HirDisplayContext<'_>) -> (s: String)
        requires
            display.options().include_types ==> display.type_renders(self.return_type),
        ensures
            s@ == display.function_text(*self),
    {
        display.render_function(self)
    }
}

impl HirStruct {
    /// Renders this struct with `display`.
    pub fn display_with_context(&self, display: &HirDisplayContext<'_>) -> (s: String)
        requires
            display.options().include_types ==> forall|i: int|
                0 <= i < self.fields@.len() ==> display.type_renders(#[trigger] self.fields@[i].ty),
        ensures
            s@ == display.struct_text(*self),
    {
        display.render_struct(self)
    }
}

} // verus!
