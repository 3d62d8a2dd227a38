pub mod csharp;
pub mod expr;
pub mod program;
pub mod syntax;
