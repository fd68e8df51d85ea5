//! The supported barcode symbologies.
//!
//! Each module holds one symbology: a constructor that validates raw data,
//! and encoders that turn a validated value into its module sequence.

pub mod codabar;
pub mod code11;
pub mod code128;
pub mod code39;
pub mod code93;
pub mod ean13;
pub mod ean8;
pub mod ean_supp;
pub mod helpers;
pub mod i2of5;
pub mod tf;
pub mod upca;
