//! Implements `Display` for a tagged union from string templates written on
//! its variants: the declaration comes back without its templates, followed
//! by a `Display` impl that renders each variant with its own template.

pub mod body;
pub mod cursor;
pub mod diagnostic;
pub mod emit;
pub mod expand;
pub mod fields;
pub mod header;
pub mod laws;
pub mod template;
pub mod token;
pub mod variant;

pub use diagnostic::CompileError;
pub use expand::display;
