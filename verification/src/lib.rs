//! Recovery of a GraphQL schema and its operation documents from literals
//! embedded in a bundled JavaScript module.
//!
//! The pipeline works on [`tree::SynNode`], the library's own picture of a
//! parsed module: an outside parser turns source text into such a tree, and
//! every step after that — positional navigation, literal extraction, the
//! type-wrapper interpretation and the SDL printer — is verified here.

pub mod assets;
pub mod build_id;
pub mod errors;
pub mod manifest;
pub mod navigate;
pub mod operations;
pub mod text;
pub mod tree;
pub mod types;
