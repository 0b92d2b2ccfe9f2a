//! A small domain-specific language for entity-relationship diagrams.
//!
//! The crate parses an ERD document into a resolved diagram model — entities
//! with typed attributes, relationships with cardinalities, and cascading
//! default options — and renders the model as a DOT-like graph description.

pub mod ast;
pub mod laws;
pub mod options;
pub mod parser;
pub mod render;
pub mod text;
