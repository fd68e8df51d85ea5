//! Generators that render an encoded barcode for output.
//!
//! Each generator consumes the flat module sequence that the symbologies
//! under [`crate::sym`] produce and renders it in one output format.

pub mod ascii;
pub mod image;
pub mod json;
pub mod svg;
mod text;
