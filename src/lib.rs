//! Structural models of object-oriented source files and their diagram text.
//!
//! A source text is cleaned of comments, scanned for its class or interface
//! header, its fields, constructors and methods, and the resulting model is
//! rendered as a readable summary and as PlantUML markup.

pub mod text;
pub mod model;
mod scan;
pub mod comments;
pub mod extract;
pub mod render;
pub mod pipeline;
