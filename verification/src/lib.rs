//! Extraction of copy-and-patch stencils from a compiled ELF object.
//!
//! A *stencil* is the machine code of one defined function, meant to be
//! copied into a generated code buffer; a *hole* is a named patch point
//! whose value is supplied at code-generation time.  The library parses an
//! object file, classifies its symbols into stencils and holes, attaches
//! each relocation of the code section to the stencil that contains it,
//! elides a redundant trailing jump, and lists the distinct holes each
//! stencil references.

pub mod classify;
pub mod loader;
pub mod model;
pub mod pipeline;
pub mod relocate;
pub mod strutil;
pub mod transform;
