//! Typed models of Avro-style schema documents and their rendering as
//! TypeScript declarations.
//!
//! A schema document is read in two steps. The [`model`] reads a JSON value
//! as a tree of typed schema nodes; [`typescript_conversion`] walks that tree
//! and renders it. [`document`] does both for one document.

pub mod document;
pub mod json;
pub mod lemmas;
pub mod model;
pub mod named;
pub mod rank;
pub mod reader;
pub mod shape;
pub mod text;
pub mod typescript_conversion;
