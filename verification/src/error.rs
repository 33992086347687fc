//! The error taxonomy: fatal compiler-stage errors and the recoverable
//! enum-lookup error.

use vstd::prelude::*;

verus! {

/// A string offered for enum lookup that names no variant. Recoverable:
/// returned to the caller, never fatal.
#[derive(Debug, Clone, PartialEq, Eq)]
pub struct UnknownVariantError {
    pub input: String,
}

/// A fatal error found while compiling a palette schema. No partial
/// artifact is ever produced once one of these is raised.
#[derive(Debug, Clone, PartialEq, Eq)]
pub enum CompileError {
    /// The document structure does not match the palette shape: a
    /// repeated key at the document level, or a malformed hex field.
    SchemaShape { key: String },
    /// A flavor's color-key set differs from the canonical universe,
    /// reported with the two sides of the symmetric difference.
    Uniformity { flavor_key: String, missing: Vec<String>, extra: Vec<String> },
    /// Two distinct original strings in one namespace normalize to the
    /// same identifier.
    IdentifierCollision { first: String, second: String, ident: String },
    /// A color's decoded hex value disagrees with the value composed
    /// from its RGB triple.
    HexConsistency { flavor_key: String, color_key: String, decoded: u32, composed: u32 },
}

} // verus!
