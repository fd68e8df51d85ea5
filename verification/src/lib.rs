//! Encoders for common one-dimensional barcode symbologies.
//!
//! Each symbology validates its input data, derives any checksum digits, and
//! maps the validated characters to a flat sequence of module values
//! (`1` = bar, `0` = space) ready for a renderer.
//!
//! Supported symbologies: EAN-13 (with the UPC-A, Bookland and JAN
//! conventions), EAN-8, the EAN-2 and EAN-5 supplementals, Code39, Code93,
//! Code11, Code128, Codabar, and standard and interleaved 2-of-5.

pub mod error;
pub mod generators;
pub mod sym;
