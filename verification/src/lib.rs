//! Compiles a declarative query description and a relational schema into SQL
//! text, and qualifies identifiers of a partially typed query.

pub mod bench;
pub mod builder;
pub mod error;
pub mod joins;
pub mod keywords;
pub mod model;
pub mod qualify;
pub mod render;
pub mod text;
pub mod words;
