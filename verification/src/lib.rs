//! Expansion logic for deriving a hierarchy of foreign-runtime exception
//! classes from an annotated error enum.
//!
//! The enum is described by plain data ([`model::EnumSpec`]): each variant
//! carries its fields, a message template, and an optional base designation.
//! The expansion validates the annotations and produces plain data again
//! ([`model::GeneratedCode`]): one exception class per variant, arranged into
//! an inheritance hierarchy rooted at the designated base variant, and one
//! match arm per variant that builds an exception value with an interpolated
//! message, so the conversion covers the whole enum.

pub mod expand;
pub mod inherit;
pub mod model;
pub mod names;
pub mod template;
