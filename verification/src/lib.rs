//! A route-tree code synthesizer: given a hierarchical description of an
//! application's routing segments, it produces the text of a program that
//! describes the tree as nested literals with lazy component references, an
//! ordered list of import statements, an insertion-ordered manifest of named
//! virtual submodules for a downstream resolver, and a flat list of the page
//! files discovered during the walk.
//!
//! The module system that compiles a manifest entry, resolves a module's
//! stable path, names a metadata route or sniffs a content type is an outside
//! collaborator; its answers are supplied up front as a [`env::ResolutionEnv`]
//! of plain lookup tables, and a missing answer fails the whole compilation.

pub mod builder;
pub mod env;
pub mod escape;
pub mod ident;
pub mod laws;
pub mod middleware;
pub mod next_build;
pub mod server_component;
pub mod source;
pub mod strings;
pub mod tree;
