//! A strict textual encoding for a versioned software identifier (a "kit
//! version") and a closed-schema configuration document that embeds it.
//!
//! The version grammar, its parse/format round-trip, and the all-or-nothing
//! field validation of the document are verified; the structured-text codec
//! (TOML) is an external collaborator reached through a few trusted wrappers.

pub mod doc;
pub mod kit_version;
pub mod schema;
mod toml_codec;
