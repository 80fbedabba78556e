//! The analysis engine behind a live UML class diagram: per-language
//! extraction of classes, fields and methods from syntax trees, and the
//! inference of the relationships drawn between them.

pub mod text;
pub mod model;
pub mod relationships;
pub mod syntax;
pub mod parsing;
pub mod paths;
pub mod languages;
pub mod scanner;
pub mod watcher;
pub mod project;
