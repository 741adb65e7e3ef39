//! Generates high-level wrapper source code for a console-SDK service: it
//! filters C-style foreign declarations by a name prefix, classifies them
//! into an initialize/exit lifecycle pair plus a call set, maps C type
//! descriptors to target-language types, rewrites identifiers into
//! snake_case, and emits compilable wrapper text.

pub mod classify;
pub mod decl;
pub mod emit;
pub mod filter;
pub mod generate;
pub mod ident;
pub mod mapping;
pub mod text;
