//! The declaration model handed in by a declaration source (a header
//! parser or a lowered-binding parser): plain names, parameters and C
//! type descriptors, read-only to the rest of the pipeline.

use vstd::prelude::*;

verus! {

/// A C type as the declaration source reports it: a base name (for
/// example `int`, `Result`, an opaque struct name) plus pointer and
/// const flags. `is_const` is meaningful only when `is_pointer` holds.
pub struct TypeDesc {
    pub base_name: String,
    pub is_pointer: bool,
    pub is_const: bool,
}

/// One declared parameter: a flat identifier and its type. Parameters
/// without a simple identifier are a fatal input error and are rejected
/// before a declaration reaches this model.
pub struct Param {
    pub name: String,
    pub ty: TypeDesc,
}

/// One foreign function declaration: a globally unique name, the ordered
/// parameters, and an optional return type.
pub struct RawDeclaration {
    pub name: String,
    pub params: Vec<Param>,
    pub ret: Option<TypeDesc>,
}

/// The classified service: exactly one init declaration, exactly one
/// exit declaration, and the remaining operations in input order.
pub struct ServiceGroup {
    pub init: RawDeclaration,
    pub exit: RawDeclaration,
    pub calls: Vec<RawDeclaration>,
}

/// A fatal condition. The generator emits a full output or nothing:
/// every error aborts the run before any text is produced.
#[derive(Debug, PartialEq, Eq, Structural)]
pub enum GenError {
    /// The filtered declarations hold no exact-named lifecycle pair.
    NoLifecyclePair,
}

} // verus!
