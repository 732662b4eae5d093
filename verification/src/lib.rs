//! Verified core of a compiler frontend's high-level intermediate representation (HIR):
//! type storage, node and id model, build-time bookkeeping, linearisation of expressions
//! and control flow, the module builder's state (ids, blocks, regions, functions, type
//! lowering), expression rewriting, template append state, declaration and body
//! validation, and a textual renderer.

pub mod ast;
pub mod body_validation;
pub mod build_hir;
pub mod builder_flow;
pub mod control_flow_linearizer;
pub mod datatypes;
pub mod errors;
pub mod expression_rewrite;
pub mod expression_linearizer;
pub mod expressions;
pub mod functions;
pub mod fx_collections;
pub mod hir_builder;
pub mod hir_datatypes;
pub mod hir_display;
pub mod hir_nodes;
pub mod hir_side_table;
pub mod hir_validation;
pub mod ids;
pub mod nodes;
pub mod string_table;
pub mod templates;
pub mod text;
pub mod tokens;
pub mod type_lowering;
