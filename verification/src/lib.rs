//! Code generation for OMG IDL data types.
//!
//! A parse tree of an IDL source is lowered into a small intermediate
//! representation (scoped names, constant expressions, type specifiers and
//! declarations), collected in an insertion-ordered module table, and rendered
//! as target source text through a set of templates.
//!
//! Every function states what it returns over the mathematical views of its
//! arguments; the calls into the parser, the template engine and the ordered
//! map are the only parts taken on trust, and each says so where it stands.

pub mod text;
pub mod expr;
pub mod types;
pub mod tree;
pub mod module;
pub mod config;
pub mod lower;
pub mod context;
pub mod error;
pub mod walk;
pub mod walker;
pub mod template;
pub mod render;
pub mod parser;
pub mod inclusion;
pub mod generate;
pub mod laws;
pub mod table_laws;
pub mod walk_laws;

pub use crate::config::{Configuration, Loader};
pub use crate::context::Context;
pub use crate::error::{IdlError, RenderError};
pub use crate::expr::{BinaryOp, IdlScopedName, IdlValueExpr, UnaryOp};
pub use crate::generate::{
    analyze, generate_from_loaded, generate_from_source, generate_from_trees, generate_with_loader,
};
pub use crate::inclusion::{resolve_all, resolve_includes, IdlLoader, MAX_INCLUDE_DEPTH};
pub use crate::module::{IdlModule, ModuleMap};
pub use crate::parser::parse_idl;
pub use crate::template::{TemplateSet, TemplateValue};
pub use crate::tree::{ParseError, ParseErrorKind, ParseNode, Production};
pub use crate::types::{
    IdlConstDcl, IdlStructMember, IdlSwitchCase, IdlSwitchElement, IdlSwitchLabel, IdlTypeDcl,
    IdlTypeDclKind, IdlTypeSpec,
};
