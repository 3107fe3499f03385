//! Discovery of the free (externally supplied) variable names of a text
//! template, together with thin rendering plumbing over the tera engine.
//!
//! The heart of the crate is a verified, scope-sensitive walk over a parsed
//! template syntax tree: `discover` holds the walk and the laws proved about
//! it, `scope` the deny-list of names bound inside the template, `ast` the
//! tree model, `engine` the bridge to the external engine, and `template`
//! the user-facing `Template` type.

pub mod ast;
pub mod laws;
pub mod scope;
pub mod discover;
mod engine;
mod template;

pub use ast::{AstExpr, AstNode};
pub use scope::ScopeTracker;
pub use discover::discover_variables;
pub use engine::{json_object_ok, parse_ok};
pub use template::{compile_and_execute, generate_context, Template};
